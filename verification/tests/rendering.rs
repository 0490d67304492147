use krabby::config::Config;
use krabby::database::PokemonDatabase;
use krabby::error::Error;
use krabby::form::Form;
use krabby::generations::Generations;
use krabby::pokemon::Pokemon;
use krabby::{list_pokemon, pokemon_by_name, NameOptions, PokemonOptions};

fn create_test_pokemon() -> Pokemon {
    Pokemon {
        slug: "test".to_string(),
        gen: 1,
        name: Vec::new(),
        desc: Vec::new(),
        forms: vec![Form::Regular, Form::Mega, Form::Gmax],
    }
}

fn en_config() -> Config {
    Config {
        language: "en".to_string(),
        shiny_numerator: 0,
        shiny_denominator: 128,
    }
}

fn sample_db() -> PokemonDatabase {
    let mewtwo = Pokemon {
        slug: "mewtwo".to_string(),
        gen: 1,
        name: vec![("en".to_string(), "Mewtwo".to_string()), ("fr".to_string(),
            "Mewtwo".to_string())],
        desc: vec![("en".to_string(), "A genetic pokemon.\nIts heart is cold.".to_string())],
        forms: vec![Form::MegaX, Form::MegaY],
    };
    let pikachu = Pokemon {
        slug: "pikachu".to_string(),
        gen: 1,
        name: vec![("en".to_string(), "Pikachu".to_string())],
        desc: Vec::new(),
        forms: vec![Form::Gmax],
    };
    let chikorita = Pokemon {
        slug: "chikorita".to_string(),
        gen: 2,
        name: vec![("en".to_string(), "Chikorita".to_string())],
        desc: Vec::new(),
        forms: Vec::new(),
    };
    let lucario = Pokemon {
        slug: "lucario".to_string(),
        gen: 4,
        name: vec![("en".to_string(), "Lucario".to_string())],
        desc: Vec::new(),
        forms: vec![Form::Mega],
    };
    let assets = vec![
        ("colorscripts/regular/mewtwo".to_string(), "/\\_/\\\n( o.o )".to_string()),
        ("colorscripts/shiny/mewtwo".to_string(), "*shiny mewtwo*".to_string()),
        ("colorscripts/regular/mewtwo-mega-x".to_string(), "mega x art".to_string()),
        ("colorscripts/regular/pikachu".to_string(), "pika".to_string()),
        ("colorscripts/shiny/pikachu".to_string(), "pika!".to_string()),
        ("colorscripts/regular/pikachu-gmax".to_string(), "big pika".to_string()),
        ("colorscripts/shiny/pikachu-gmax".to_string(), "big pika!".to_string()),
        ("colorscripts/regular/chikorita".to_string(), "leaf".to_string()),
        ("colorscripts/regular/lucario".to_string(), "aura".to_string()),
    ];
    PokemonDatabase::load(vec![mewtwo, pikachu, chikorita, lucario], assets, en_config())
}

fn plain_options() -> PokemonOptions {
    PokemonOptions {
        info: false,
        shiny: false,
        no_title: false,
        padding_left: 0,
    }
}

#[test]
fn test_pokemon_get_filtered_forms() {
    let pokemon = create_test_pokemon();

    let exclude = vec![Form::Mega];
    let filtered_forms = pokemon.get_filtered_forms(&exclude);
    assert_eq!(filtered_forms, vec![Form::Regular, Form::Gmax]);

    let exclude = vec![Form::Other("unknown".to_string())];
    let filtered_forms = pokemon.get_filtered_forms(&exclude);
    assert_eq!(filtered_forms, pokemon.forms);
}

#[test]
fn test_pokemon_get_form_slug() {
    let pokemon = create_test_pokemon();

    assert_eq!(pokemon.get_form_slug(&Form::Regular).unwrap(), "test");
    assert_eq!(pokemon.get_form_slug(&Form::Mega).unwrap(), "test-mega");
    assert!(pokemon
        .get_form_slug(&Form::Other("nonexistant".to_string()))
        .is_err());
}

#[test]
fn test_pokemon_get_art_path() {
    let pokemon = create_test_pokemon();
    assert_eq!(
        pokemon.get_art_path(&Form::Regular, false).unwrap(),
        "colorscripts/regular/test"
    );
    assert_eq!(
        pokemon.get_art_path(&Form::Mega, true).unwrap(),
        "colorscripts/shiny/test-mega"
    );
    let err = pokemon.get_art_path(&Form::Other("primal".to_string()), false);
    assert_eq!(
        err.unwrap_err(),
        Error::InvalidPokemonForm("test".to_string(), "primal".to_string())
    );
}

#[test]
fn test_other_forms_mutually_equal_for_exclusion() {
    let pokemon = Pokemon {
        slug: "deoxys".to_string(),
        gen: 3,
        name: Vec::new(),
        desc: Vec::new(),
        forms: vec![Form::Other("attack".to_string()), Form::Mega],
    };
    // An Other exclusion rules out every Other form, whatever its token.
    let filtered = pokemon.get_filtered_forms(&[Form::Other("defense".to_string())]);
    assert_eq!(filtered, vec![Form::Mega]);
}

#[test]
fn test_pokemon_database_load() {
    let db = sample_db();
    assert!(
        !db.get_all().is_empty(),
        "Pokemon database should not be empty"
    );
}

#[test]
fn test_pokemon_database_filter_by_generation() {
    let db = sample_db();
    let generations = Generations::from_str("1-3").unwrap();
    let filtered_pokemon: Vec<&Pokemon> = db.filter_by_generation(&generations);
    assert!(
        !filtered_pokemon.is_empty(),
        "Filtered pokemon should not be empty"
    );
    // Soundness: nothing outside the requested set, and repeated calls agree.
    for p in &filtered_pokemon {
        assert!((1..=3).contains(&p.gen));
    }
    let again: Vec<&Pokemon> = db.filter_by_generation(&generations);
    let slugs: Vec<&str> = filtered_pokemon.iter().map(|p| p.slug.as_str()).collect();
    let slugs_again: Vec<&str> = again.iter().map(|p| p.slug.as_str()).collect();
    assert_eq!(slugs, slugs_again);
    assert_eq!(slugs, vec!["mewtwo", "pikachu", "chikorita"]);
}

#[test]
fn test_pokemon_database_show_pokemon_by_name() {
    let db = sample_db();
    let name = NameOptions {
        name: "mewtwo".to_string(),
        form: Form::Regular,
        common: plain_options(),
    };
    assert!(db.show_pokemon_by_name(&name).is_ok());
}

#[test]
fn test_render_title_blank_line_then_art() {
    let db = sample_db();
    let name = NameOptions {
        name: "mewtwo".to_string(),
        form: Form::Regular,
        common: plain_options(),
    };
    let text = db.show_pokemon_by_name(&name).unwrap();
    assert_eq!(text, "Mewtwo\n\n/\\_/\\\n( o.o )\n");
}

#[test]
fn test_render_padding_prefixes_every_line() {
    let db = sample_db();
    let name = NameOptions {
        name: "mewtwo".to_string(),
        form: Form::Regular,
        common: PokemonOptions {
            info: true,
            shiny: false,
            no_title: false,
            padding_left: 3,
        },
    };
    let text = db.show_pokemon_by_name(&name).unwrap();
    assert_eq!(
        text,
        "   Mewtwo\n   A genetic pokemon.\n   Its heart is cold.\n\n   /\\_/\\\n   ( o.o )\n"
    );
}

#[test]
fn test_render_form_suffix_and_no_title() {
    let db = sample_db();
    let with_form = NameOptions {
        name: "mewtwo".to_string(),
        form: Form::MegaX,
        common: plain_options(),
    };
    let text = db.show_pokemon_by_name(&with_form).unwrap();
    assert_eq!(text, "Mewtwo (mega-x)\n\nmega x art\n");

    let untitled = NameOptions {
        name: "mewtwo".to_string(),
        form: Form::Regular,
        common: PokemonOptions {
            info: false,
            shiny: false,
            no_title: true,
            padding_left: 0,
        },
    };
    let text = db.show_pokemon_by_name(&untitled).unwrap();
    assert_eq!(text, "\n/\\_/\\\n( o.o )\n");
}

#[test]
fn test_invalid_pokemon_form_error() {
    let db = sample_db();
    let name = NameOptions {
        name: "pikachu".to_string(),
        form: Form::Mega,
        common: plain_options(),
    };
    let err = db.show_pokemon_by_name(&name).unwrap_err();
    assert_eq!(
        err,
        Error::InvalidPokemonForm("pikachu".to_string(), "mega".to_string())
    );
}

#[test]
fn test_invalid_pokemon_error() {
    let db = sample_db();
    let name = NameOptions {
        name: "missingno".to_string(),
        form: Form::Regular,
        common: plain_options(),
    };
    let err = db.show_pokemon_by_name(&name).unwrap_err();
    assert_eq!(err, Error::InvalidPokemon("missingno".to_string()));
}

#[test]
fn test_invalid_language_error() {
    let mewtwo = Pokemon {
        slug: "mewtwo".to_string(),
        gen: 1,
        name: vec![("en".to_string(), "Mewtwo".to_string())],
        desc: Vec::new(),
        forms: Vec::new(),
    };
    let assets = vec![("colorscripts/regular/mewtwo".to_string(), "art".to_string())];
    let config = Config {
        language: "xx".to_string(),
        shiny_numerator: 0,
        shiny_denominator: 128,
    };
    let db = PokemonDatabase::load(vec![mewtwo], assets, config);
    let name = NameOptions {
        name: "mewtwo".to_string(),
        form: Form::Regular,
        common: plain_options(),
    };
    let err = db.show_pokemon_by_name(&name).unwrap_err();
    assert_eq!(err, Error::InvalidLanguage("xx".to_string()));
}

#[test]
fn test_asset_not_found_error() {
    let db = sample_db();
    // mewtwo has no shiny mega-x entry in the store.
    let name = NameOptions {
        name: "mewtwo".to_string(),
        form: Form::MegaX,
        common: PokemonOptions {
            info: false,
            shiny: true,
            no_title: false,
            padding_left: 0,
        },
    };
    let err = db.show_pokemon_by_name(&name).unwrap_err();
    assert_eq!(
        err,
        Error::AssetNotFound("colorscripts/shiny/mewtwo-mega-x".to_string())
    );
}

#[test]
fn test_missing_description_is_tolerated() {
    let db = sample_db();
    let name = NameOptions {
        name: "pikachu".to_string(),
        form: Form::Regular,
        common: PokemonOptions {
            info: true,
            shiny: false,
            no_title: false,
            padding_left: 0,
        },
    };
    let text = db.show_pokemon_by_name(&name).unwrap();
    assert_eq!(text, "Pikachu\n\npika\n");
}

#[test]
fn test_list_pokemon_names() {
    let db = sample_db();
    let generations = Generations::from_str("1").unwrap();
    let listing = db.list_pokemon_names(&generations);
    assert_eq!(listing, "mewtwo\npikachu\n");

    let all = list_pokemon(&db, &Generations::from_str("1-9").unwrap()).unwrap();
    assert_eq!(all, "mewtwo\npikachu\nchikorita\nlucario\n");
}

#[test]
fn test_pokemon_by_name_entry_point() {
    let db = sample_db();
    let options = NameOptions {
        name: "chikorita".to_string(),
        form: Form::Regular,
        common: plain_options(),
    };
    let text = pokemon_by_name(&db, &options).unwrap();
    assert_eq!(text, "Chikorita\n\nleaf\n");
}
