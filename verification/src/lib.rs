//! Query and rendering core of a terminal art-display tool for pokemon:
//! generation-range parsing, form resolution, database lookup and filtering,
//! and the text composition that merges localized names, descriptions and
//! pre-rendered art into padded output.

pub mod config;
pub mod database;
pub mod error;
pub mod form;
pub mod generations;
pub mod pokemon;
pub mod rng;
pub mod text;

use vstd::prelude::*;

use crate::database::{show_spec, spec_candidate_form_ok, spec_filter_generations,
    spec_names_text, PokemonDatabase};
use crate::error::Error;
use crate::form::Form;
use crate::generations::{gens_text, Generations};

verus! {

/// Display options common to every rendering operation.
#[derive(Debug)]
pub struct PokemonOptions {
    /// Print the pokedex entry if one exists for the configured language.
    pub info: bool,
    /// Show the shiny version instead.
    pub shiny: bool,
    /// Do not display the pokemon name.
    pub no_title: bool,
    /// Amount of padding to the left of every line.
    pub padding_left: usize,
}

/// A request for one entity by slug, with the desired form.
#[derive(Debug)]
pub struct NameOptions {
    /// The slug of the pokemon to show.
    pub name: String,
    /// The requested form.
    pub form: Form,
    /// Display options.
    pub common: PokemonOptions,
}

/// A request for a random entity from a set of generations.
#[derive(Debug)]
pub struct RandomOptions {
    /// The generations to choose among.
    pub generations: Generations,
    /// Do not show mega pokemon.
    pub no_mega: bool,
    /// Do not show gigantamax pokemon.
    pub no_gmax: bool,
    /// Do not show regional pokemon.
    pub no_regional: bool,
    /// Show the regular form only.
    pub no_variant: bool,
    /// Display options.
    pub common: PokemonOptions,
}

/// Lists the slugs of all entities from the given generations, one per line.
pub fn list_pokemon(db: &PokemonDatabase, generations: &Generations) -> (r: Result<String, Error>)
    ensures
        r matches Ok(s) && s@ == spec_names_text(
            spec_filter_generations(db.pokemon@, generations.0@),
        ),
{
    Ok(db.list_pokemon_names(generations))
}

/// Renders the entity selected by name, form and shininess.
pub fn pokemon_by_name(db: &PokemonDatabase, options: &NameOptions) -> (r: Result<String, Error>)
    ensures
        show_spec(
            *db,
            options.name@,
            options.form,
            options.common.shiny,
            options.common.info,
            options.common.no_title,
            options.common.padding_left as nat,
            r,
        ),
{
    db.show_pokemon_by_name(options)
}

/// Renders a randomly selected entity, drawing entity, form and shininess
/// from the injected generator.
pub fn random_pokemon(db: &PokemonDatabase, options: &RandomOptions, rng: &mut rand::rngs::StdRng)
    -> (r: Result<String, Error>)
    requires
        db.config.wf(),
        options.generations.wf(),
    ensures
        ({
            let cands = spec_filter_generations(db.pokemon@, options.generations.0@);
            if cands.len() == 0 {
                r matches Err(Error::InvalidGeneration(raw)) && raw@ == gens_text(
                    options.generations.0@,
                )
            } else {
                exists|i: int, f: Form, sh: bool|
                    #![trigger show_spec(
                        *db,
                        cands[i].slug@,
                        f,
                        sh,
                        options.common.info,
                        options.common.no_title,
                        options.common.padding_left as nat,
                        r,
                    )]
                    {
                        &&& 0 <= i < cands.len()
                        &&& spec_candidate_form_ok(cands[i], *options, f)
                        &&& (options.common.shiny ==> sh)
                        &&& show_spec(
                            *db,
                            cands[i].slug@,
                            f,
                            sh,
                            options.common.info,
                            options.common.no_title,
                            options.common.padding_left as nat,
                            r,
                        )
                    }
            }
        }),
{
    db.show_random_pokemon(options, rng)
}

} // verus!
