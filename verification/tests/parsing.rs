use krabby::error::Error;
use krabby::form::Form;
use krabby::generations::Generations;

#[test]
fn test_generations_from_str() {
    assert_eq!(Generations::from_str("2").unwrap().0, vec![2]);
    assert_eq!(Generations::from_str("1-3").unwrap().0, vec![1, 2, 3]);
    assert_eq!(Generations::from_str("1,3,5").unwrap().0, vec![1, 3, 5]);
    assert!(Generations::from_str("0").is_err());
    assert!(Generations::from_str("256").is_err());
    assert!(Generations::from_str("1-100").is_err());
    assert!(Generations::from_str("a,b,c").is_err());
}

#[test]
fn test_range_parses_to_full_interval() {
    for a in 1u8..=9 {
        for b in a..=9 {
            let input = format!("{}-{}", a, b);
            let gens = Generations::from_str(&input).unwrap().0;
            let expected: Vec<u8> = (a..=b).collect();
            assert_eq!(gens, expected, "range {}", input);
        }
    }
}

#[test]
fn test_comma_list_deduplicates_and_ignores_order() {
    let a = Generations::from_str("3,1,3,1").unwrap().0;
    let b = Generations::from_str("1,3").unwrap().0;
    let mut sa = a.clone();
    sa.sort();
    let mut sb = b.clone();
    sb.sort();
    assert_eq!(sa, sb);
    assert_eq!(a, vec![3, 1]);
}

#[test]
fn test_invalid_generation_strings_fail() {
    for bad in ["10", "0", "", ",", "1,", "1,,2", "5-2", "1-", "-3", "2-10", "x", "1,x", "+3",
        " 1", "1-2-3"]
    {
        let r = Generations::from_str(bad);
        match r {
            Err(Error::InvalidGeneration(raw)) => assert_eq!(raw, bad),
            _ => panic!("expected InvalidGeneration for {:?}", bad),
        }
    }
}

#[test]
fn test_generations_reversed_range_fails() {
    assert!(Generations::from_str("5-2").is_err());
}

#[test]
fn test_form_round_trip_canonical() {
    let tokens = ["regular", "mega", "mega-x", "mega-y", "gmax", "alola", "galar", "hisui",
        "paldea"];
    for tok in tokens {
        let form = Form::from_str(tok);
        assert_eq!(form.as_str(), tok);
    }
    assert_eq!(Form::from_str("regular"), Form::Regular);
    assert_eq!(Form::from_str("mega"), Form::Mega);
    assert_eq!(Form::from_str("mega-x"), Form::MegaX);
    assert_eq!(Form::from_str("mega-y"), Form::MegaY);
    assert_eq!(Form::from_str("gmax"), Form::Gmax);
    assert_eq!(Form::from_str("alola"), Form::Alola);
    assert_eq!(Form::from_str("galar"), Form::Galar);
    assert_eq!(Form::from_str("hisui"), Form::Hisui);
    assert_eq!(Form::from_str("paldea"), Form::Paldea);
}

#[test]
fn test_form_round_trip_unknown() {
    for tok in ["primal", "origin", "", "MEGA", "regular ", "some-odd-form"] {
        let form = Form::from_str(tok);
        assert_eq!(form, Form::Other(tok.to_string()));
        assert_eq!(form.as_str(), tok);
    }
}
