use rand::SeedableRng;

use krabby::config::Config;
use krabby::database::PokemonDatabase;
use krabby::error::Error;
use krabby::form::Form;
use krabby::generations::Generations;
use krabby::pokemon::Pokemon;
use krabby::{random_pokemon, PokemonOptions, RandomOptions};

fn en_config() -> Config {
    Config {
        language: "en".to_string(),
        shiny_numerator: 0,
        shiny_denominator: 128,
    }
}

fn one_pokemon_db() -> PokemonDatabase {
    let pikachu = Pokemon {
        slug: "pikachu".to_string(),
        gen: 1,
        name: vec![("en".to_string(), "Pikachu".to_string())],
        desc: Vec::new(),
        forms: vec![Form::Gmax, Form::Other("rock-star".to_string())],
    };
    let assets = vec![
        ("colorscripts/regular/pikachu".to_string(), "pika".to_string()),
        ("colorscripts/shiny/pikachu".to_string(), "pika!".to_string()),
        ("colorscripts/regular/pikachu-gmax".to_string(), "big pika".to_string()),
        ("colorscripts/shiny/pikachu-gmax".to_string(), "big pika!".to_string()),
        ("colorscripts/regular/pikachu-rock-star".to_string(), "rock pika".to_string()),
        ("colorscripts/shiny/pikachu-rock-star".to_string(), "rock pika!".to_string()),
    ];
    PokemonDatabase::load(vec![pikachu], assets, en_config())
}

fn random_options(generations: &str) -> RandomOptions {
    RandomOptions {
        generations: Generations::from_str(generations).unwrap(),
        no_mega: false,
        no_gmax: false,
        no_regional: false,
        no_variant: false,
        common: PokemonOptions {
            info: false,
            shiny: false,
            no_title: false,
            padding_left: 0,
        },
    }
}

#[test]
fn test_pokemon_database_show_random_pokemon() {
    let db = one_pokemon_db();
    let random = random_options("1-3");
    let mut rng = rand::rngs::StdRng::seed_from_u64(7);
    assert!(db.show_random_pokemon(&random, &mut rng).is_ok());
}

#[test]
fn test_random_pokemon_draws_valid_renderings() {
    let db = one_pokemon_db();
    let random = random_options("1");
    let mut rng = rand::rngs::StdRng::seed_from_u64(42);
    // Whatever the draws, the result is one of the entity's renderings.
    for _ in 0..50 {
        let text = random_pokemon(&db, &random, &mut rng).unwrap();
        assert!(
            text == "Pikachu\n\npika\n"
                || text == "Pikachu (gmax)\n\nbig pika\n"
                || text == "Pikachu (rock-star)\n\nrock pika\n",
            "unexpected rendering: {:?}",
            text
        );
    }
}

#[test]
fn test_random_pokemon_all_exclusions_falls_back_to_regular() {
    let db = one_pokemon_db();
    let mut random = random_options("1");
    random.no_mega = true;
    random.no_gmax = true;
    random.no_regional = true;
    random.no_variant = true;
    let mut rng = rand::rngs::StdRng::seed_from_u64(11);
    for _ in 0..20 {
        let text = db.show_random_pokemon(&random, &mut rng).unwrap();
        assert_eq!(text, "Pikachu\n\npika\n");
    }
}

#[test]
fn test_random_pokemon_shiny_override() {
    let db = one_pokemon_db();
    let mut random = random_options("1");
    random.no_variant = true;
    random.common.shiny = true;
    let mut rng = rand::rngs::StdRng::seed_from_u64(3);
    let text = db.show_random_pokemon(&random, &mut rng).unwrap();
    assert_eq!(text, "Pikachu\n\npika!\n");
}

#[test]
fn test_random_pokemon_certain_shiny_rate() {
    let pikachu = Pokemon {
        slug: "pikachu".to_string(),
        gen: 1,
        name: vec![("en".to_string(), "Pikachu".to_string())],
        desc: Vec::new(),
        forms: Vec::new(),
    };
    let assets = vec![
        ("colorscripts/regular/pikachu".to_string(), "pika".to_string()),
        ("colorscripts/shiny/pikachu".to_string(), "pika!".to_string()),
    ];
    let config = Config {
        language: "en".to_string(),
        shiny_numerator: 1,
        shiny_denominator: 1,
    };
    let db = PokemonDatabase::load(vec![pikachu], assets, config);
    let random = random_options("1");
    let mut rng = rand::rngs::StdRng::seed_from_u64(5);
    let text = db.show_random_pokemon(&random, &mut rng).unwrap();
    assert_eq!(text, "Pikachu\n\npika!\n");
}

#[test]
fn test_random_pokemon_empty_filter_fails() {
    let db = one_pokemon_db();
    let random = random_options("4,6");
    let mut rng = rand::rngs::StdRng::seed_from_u64(1);
    let err = db.show_random_pokemon(&random, &mut rng).unwrap_err();
    assert_eq!(err, Error::InvalidGeneration("4,6".to_string()));
}
