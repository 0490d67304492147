//! The database: the loaded entities, the asset store and the active
//! configuration, with lookup, filtering, listing, rendering and random
//! selection on top of them.

use vstd::prelude::*;

use crate::config::Config;
use crate::error::Error;
use crate::form::{spec_form_token, Form};
use crate::generations::{gens_text, gens_to_text, Generations};
use crate::pokemon::{form_available, spec_art_key, Pokemon};
use crate::rng::rng_below;
use crate::text::{eq_str, lemma_padded_lines, lemma_spaces_no_newline, make_padding, map_get,
    push_padded, spaces, spec_lines, spec_map_get, spec_padded};
use crate::{NameOptions, PokemonOptions, RandomOptions};

verus! {

/// The immutable in-memory collection: every entity in load order, the
/// asset store as key/text pairs, and the active configuration.
pub struct PokemonDatabase {
    /// All entities, in load order.
    pub pokemon: Vec<Pokemon>,
    /// The asset store: pre-rendered art text under its asset key.
    pub assets: Vec<(String, String)>,
    /// The active configuration.
    pub config: Config,
}

/// The first entity whose slug is `slug`, if any.
pub open spec fn spec_find_pokemon(ps: Seq<Pokemon>, slug: Seq<char>) -> Option<Pokemon>
    decreases ps.len(),
{
    if ps.len() == 0 {
        None
    } else if ps[0].slug@ == slug {
        Some(ps[0])
    } else {
        spec_find_pokemon(ps.skip(1), slug)
    }
}

/// A found entity carries the slug it was looked up under.
pub proof fn lemma_find_pokemon_slug(ps: Seq<Pokemon>, slug: Seq<char>)
    ensures
        spec_find_pokemon(ps, slug) matches Some(p) ==> p.slug@ == slug,
    decreases ps.len(),
{
    if ps.len() != 0 && ps[0].slug@ != slug {
        lemma_find_pokemon_slug(ps.skip(1), slug);
    }
}

/// The entities whose generation lies in `gens`, in load order.
pub open spec fn spec_filter_generations(ps: Seq<Pokemon>, gens: Seq<u8>) -> Seq<Pokemon> {
    ps.filter(|p: Pokemon| gens.contains(p.gen))
}

/// The newline-terminated list of the slugs of `ps`.
pub open spec fn spec_names_text(ps: Seq<Pokemon>) -> Seq<char>
    decreases ps.len(),
{
    if ps.len() == 0 {
        Seq::empty()
    } else {
        spec_names_text(ps.drop_last()) + ps.last().slug@ + seq!['\n']
    }
}

/// The text composed for a resolved (entity, form, art, shininess) triple:
/// the optional padded title line with its form suffix, the optional padded
/// description, one blank separator line, then the padded art.
pub open spec fn spec_render(
    p: Pokemon,
    form: Form,
    art: Seq<char>,
    lang: Seq<char>,
    info: bool,
    no_title: bool,
    pad: Seq<char>,
) -> Seq<char> {
    let title = if no_title {
        Seq::<char>::empty()
    } else {
        match spec_map_get(p.name@, lang) {
            Some(n) => pad + n + (if form is Regular {
                Seq::<char>::empty()
            } else {
                " ("@ + spec_form_token(form) + ")"@
            }) + seq!['\n'],
            None => Seq::<char>::empty(),
        }
    };
    let descr = if info {
        match spec_map_get(p.desc@, lang) {
            Some(d) => spec_padded(d, pad),
            None => Seq::<char>::empty(),
        }
    } else {
        Seq::<char>::empty()
    };
    title + descr + seq!['\n'] + spec_padded(art, pad)
}

/// Padding law at the renderer: a section padded with `n` spaces has exactly
/// the lines of the original section, each prefixed by exactly `n` spaces;
/// description and art are padded by this shape, the title line by
/// construction.
pub proof fn lemma_render_padding(s: Seq<char>, n: nat)
    ensures
        spec_lines(spec_padded(s, spaces(n))) == spec_lines(s).map_values(
            |l: Seq<char>| spaces(n) + l,
        ),
{
    lemma_spaces_no_newline(n);
    lemma_padded_lines(s, spaces(n));
}

/// What rendering one entity yields: the composed text on success, and each
/// failure exactly on its inputs — unknown slug, unavailable form, missing
/// asset key, then missing language (checked only when the title is shown).
pub open spec fn show_spec(
    db: PokemonDatabase,
    slug: Seq<char>,
    form: Form,
    shiny: bool,
    info: bool,
    no_title: bool,
    pad_n: nat,
    r: Result<String, Error>,
) -> bool {
    match spec_find_pokemon(db.pokemon@, slug) {
        None => r matches Err(Error::InvalidPokemon(s)) && s@ == slug,
        Some(p) => if !form_available(p.forms@, form) {
            r matches Err(Error::InvalidPokemonForm(s, t)) && s@ == slug && t@ == spec_form_token(
                form,
            )
        } else {
            let key = spec_art_key(p.slug@, form, shiny);
            match spec_map_get(db.assets@, key) {
                None => r matches Err(Error::AssetNotFound(k)) && k@ == key,
                Some(art) => if !no_title && spec_map_get(p.name@, db.config.language@) is None {
                    r matches Err(Error::InvalidLanguage(l)) && l@ == db.config.language@
                } else {
                    r matches Ok(text) && text@ == spec_render(
                        p,
                        form,
                        art,
                        db.config.language@,
                        info,
                        no_title,
                        spaces(pad_n),
                    )
                },
            }
        },
    }
}

/// Whether the request's exclusion switches rule the form `f` out of random
/// selection. `no_variant` rules out everything but Regular; the other
/// switches each rule out their group. Regular is never ruled out.
pub open spec fn spec_excluded_by_opts(f: Form, o: RandomOptions) -> bool {
    match f {
        Form::Regular => false,
        Form::Mega => o.no_mega || o.no_variant,
        Form::MegaX => o.no_mega || o.no_variant,
        Form::MegaY => o.no_mega || o.no_variant,
        Form::Gmax => o.no_gmax || o.no_variant,
        Form::Alola => o.no_regional || o.no_variant,
        Form::Galar => o.no_regional || o.no_variant,
        Form::Hisui => o.no_regional || o.no_variant,
        Form::Paldea => o.no_regional || o.no_variant,
        Form::Other(_) => o.no_variant,
    }
}

/// Whether `f` is a candidate form when the entity `p` is drawn under the
/// request `o`: Regular always is, and every listed form survives unless a
/// switch rules it out.
pub open spec fn spec_candidate_form_ok(p: Pokemon, o: RandomOptions, f: Form) -> bool {
    ||| f is Regular
    ||| p.forms@.filter(|g: Form| !spec_excluded_by_opts(g, o)).contains(f)
}

/// Fallback law: whatever the exclusion switches, Regular remains a
/// candidate form of every entity, so the random draw always has a form to
/// fall back on.
pub proof fn lemma_regular_always_candidate(p: Pokemon, o: RandomOptions)
    ensures
        spec_candidate_form_ok(p, o, Form::Regular),
{
}

/// Fallback law, other half: when every variant is ruled out, Regular is the
/// only candidate form left, so a draw under full exclusions always resolves
/// to the regular form.
pub proof fn lemma_full_exclusions_only_regular(p: Pokemon, o: RandomOptions, f: Form)
    requires
        o.no_variant,
        spec_candidate_form_ok(p, o, f),
    ensures
        f is Regular,
{
    if !(f is Regular) {
        let survivors = p.forms@.filter(|g: Form| !spec_excluded_by_opts(g, o));
        let i = choose|i: int| 0 <= i < survivors.len() && survivors[i] == f;
        p.forms@.lemma_filter_pred(|g: Form| !spec_excluded_by_opts(g, o), i);
    }
}

/// Soundness of generation filtering: every entity the filter yields has its
/// generation in the requested set.
pub proof fn lemma_filter_generations_sound(ps: Seq<Pokemon>, gens: Seq<u8>, i: int)
    requires
        0 <= i < spec_filter_generations(ps, gens).len(),
    ensures
        gens.contains(spec_filter_generations(ps, gens)[i].gen),
{
    ps.lemma_filter_pred(|p: Pokemon| gens.contains(p.gen), i);
}

/// Repetition law: filtering is a pure function of the entities and the
/// requested set, so two results of `filter_by_generation` on the same
/// arguments are the same sequence of entities, with no side effects between
/// them.
pub proof fn lemma_filter_generations_repeatable(
    ps: Seq<Pokemon>,
    gens: Seq<u8>,
    r1: Seq<Pokemon>,
    r2: Seq<Pokemon>,
)
    requires
        r1 == spec_filter_generations(ps, gens),
        r2 == spec_filter_generations(ps, gens),
    ensures
        r1 == r2,
{
}

/// Whether the request's exclusion switches rule the form `f` out.
fn excluded_by_opts(f: &Form, o: &RandomOptions) -> (r: bool)
    ensures
        r == spec_excluded_by_opts(*f, *o),
{
    match f {
        Form::Regular => false,
        Form::Mega => o.no_mega || o.no_variant,
        Form::MegaX => o.no_mega || o.no_variant,
        Form::MegaY => o.no_mega || o.no_variant,
        Form::Gmax => o.no_gmax || o.no_variant,
        Form::Alola => o.no_regional || o.no_variant,
        Form::Galar => o.no_regional || o.no_variant,
        Form::Hisui => o.no_regional || o.no_variant,
        Form::Paldea => o.no_regional || o.no_variant,
        Form::Other(_) => o.no_variant,
    }
}

/// The listed forms of `p` that survive the request's exclusions, in order.
fn candidate_forms(p: &Pokemon, o: &RandomOptions) -> (r: Vec<Form>)
    ensures
        r@ == p.forms@.filter(|f: Form| !spec_excluded_by_opts(f, *o)),
{
    let mut out: Vec<Form> = Vec::new();
    let mut i: usize = 0;
    proof {
        assert(p.forms@.take(0) =~= Seq::<Form>::empty());
        assert(out@ =~= p.forms@.take(0).filter(|f: Form| !spec_excluded_by_opts(f, *o)));
    }
    while i < p.forms.len()
        invariant
            i <= p.forms@.len(),
            out@ == p.forms@.take(i as int).filter(|f: Form| !spec_excluded_by_opts(f, *o)),
        decreases p.forms@.len() - i,
    {
        proof {
            assert(p.forms@.take(i + 1) =~= p.forms@.take(i as int).push(p.forms@[i as int]));
            p.forms@.take(i as int).lemma_filter_push(
                p.forms@[i as int],
                |f: Form| !spec_excluded_by_opts(f, *o),
            );
        }
        if !excluded_by_opts(&p.forms[i], o) {
            out.push(p.forms[i].clone());
        }
        i += 1;
    }
    proof {
        assert(p.forms@.take(p.forms@.len() as int) =~= p.forms@);
    }
    out
}

impl PokemonDatabase {
    /// Builds the database from decoded entities, the asset store and the
    /// configuration.
    pub fn load(pokemon: Vec<Pokemon>, assets: Vec<(String, String)>, config: Config) -> (db:
        PokemonDatabase)
        ensures
            db.pokemon == pokemon,
            db.assets == assets,
            db.config == config,
    {
        PokemonDatabase { pokemon, assets, config }
    }

    /// All entities, in load order.
    pub fn get_all(&self) -> (r: &Vec<Pokemon>)
        ensures
            r == &self.pokemon,
    {
        &self.pokemon
    }

    /// The first entity with the given slug, if any.
    fn find_by_slug(&self, slug: &str) -> (r: Option<&Pokemon>)
        ensures
            match r {
                Some(p) => spec_find_pokemon(self.pokemon@, slug@) == Some(*p),
                None => spec_find_pokemon(self.pokemon@, slug@) is None,
            },
    {
        let mut i: usize = 0;
        proof {
            assert(self.pokemon@.skip(0) =~= self.pokemon@);
        }
        while i < self.pokemon.len()
            invariant
                i <= self.pokemon@.len(),
                spec_find_pokemon(self.pokemon@, slug@) == spec_find_pokemon(
                    self.pokemon@.skip(i as int),
                    slug@,
                ),
            decreases self.pokemon@.len() - i,
        {
            proof {
                let rest = self.pokemon@.skip(i as int);
                assert(rest[0] == self.pokemon@[i as int]);
                assert(rest.skip(1) =~= self.pokemon@.skip(i + 1));
            }
            if eq_str(self.pokemon[i].slug.as_str(), slug) {
                return Some(&self.pokemon[i]);
            }
            i += 1;
        }
        proof {
            assert(self.pokemon@.skip(i as int) =~= Seq::<Pokemon>::empty());
        }
        None
    }

    /// The entities whose generation lies in the given set, in load order.
    /// The result is a pure function of the database and the set: repeated
    /// calls yield identical sequences.
    pub fn filter_by_generation<'a>(&'a self, generations: &Generations) -> (r: Vec<&'a Pokemon>)
        ensures
            r@.map_values(|p: &Pokemon| *p) == spec_filter_generations(
                self.pokemon@,
                generations.0@,
            ),
    {
        let mut out: Vec<&Pokemon> = Vec::new();
        let mut i: usize = 0;
        proof {
            assert(self.pokemon@.take(0) =~= Seq::<Pokemon>::empty());
            assert(out@.map_values(|p: &Pokemon| *p) =~= self.pokemon@.take(0).filter(
                |p: Pokemon| generations.0@.contains(p.gen),
            ));
        }
        while i < self.pokemon.len()
            invariant
                i <= self.pokemon@.len(),
                out@.map_values(|p: &Pokemon| *p) == self.pokemon@.take(i as int).filter(
                    |p: Pokemon| generations.0@.contains(p.gen),
                ),
            decreases self.pokemon@.len() - i,
        {
            proof {
                assert(self.pokemon@.take(i + 1) =~= self.pokemon@.take(i as int).push(
                    self.pokemon@[i as int],
                ));
                self.pokemon@.take(i as int).lemma_filter_push(
                    self.pokemon@[i as int],
                    |p: Pokemon| generations.0@.contains(p.gen),
                );
            }
            let ghost before = out@;
            if crate::generations::vec_contains_u8(&generations.0, self.pokemon[i].gen) {
                out.push(&self.pokemon[i]);
                proof {
                    assert(out@.map_values(|p: &Pokemon| *p) =~= before.map_values(
                        |p: &Pokemon| *p,
                    ).push(self.pokemon@[i as int]));
                }
            }
            i += 1;
        }
        proof {
            assert(self.pokemon@.take(self.pokemon@.len() as int) =~= self.pokemon@);
        }
        out
    }

    /// The slugs of all entities from the given generations, one per line,
    /// each line closed by a newline.
    pub fn list_pokemon_names(&self, generations: &Generations) -> (r: String)
        ensures
            r@ == spec_names_text(spec_filter_generations(self.pokemon@, generations.0@)),
    {
        let filtered = self.filter_by_generation(generations);
        let ghost fs = filtered@.map_values(|p: &Pokemon| *p);
        let mut out = String::new();
        let mut i: usize = 0;
        proof {
            assert(fs.take(0) =~= Seq::<Pokemon>::empty());
        }
        while i < filtered.len()
            invariant
                i <= filtered@.len(),
                fs == filtered@.map_values(|p: &Pokemon| *p),
                out@ == spec_names_text(fs.take(i as int)),
            decreases filtered@.len() - i,
        {
            out.append(filtered[i].slug.as_str());
            out.append("\n");
            proof {
                reveal_strlit("\n");
                let cur = fs.take(i + 1);
                assert(cur.drop_last() =~= fs.take(i as int));
                assert(cur.last() == fs[i as int]);
                assert(out@ =~= spec_names_text(cur));
            }
            i += 1;
        }
        proof {
            assert(fs.take(fs.len() as int) =~= fs);
        }
        out
    }

    /// Renders the entity with the requested slug, form and shininess into
    /// the composed text; fails with `InvalidPokemon`, `InvalidPokemonForm`,
    /// `AssetNotFound` or `InvalidLanguage` exactly as `show_spec` says.
    pub fn show_pokemon_by_name(&self, name: &NameOptions) -> (r: Result<String, Error>)
        ensures
            show_spec(
                *self,
                name.name@,
                name.form,
                name.common.shiny,
                name.common.info,
                name.common.no_title,
                name.common.padding_left as nat,
                r,
            ),
    {
        let p = match self.find_by_slug(name.name.as_str()) {
            Some(p) => p,
            None => {
                return Err(Error::InvalidPokemon(name.name.clone()));
            },
        };
        proof {
            lemma_find_pokemon_slug(self.pokemon@, name.name@);
        }
        let art_key = match p.get_art_path(&name.form, name.common.shiny) {
            Ok(k) => k,
            Err(e) => {
                return Err(e);
            },
        };
        let art = match map_get(&self.assets, art_key.as_str()) {
            Some(a) => a,
            None => {
                return Err(Error::AssetNotFound(art_key));
            },
        };
        let pad = make_padding(name.common.padding_left);
        let mut out = String::new();
        if !name.common.no_title {
            match map_get(&p.name, self.config.language.as_str()) {
                Some(title) => {
                    out.append(pad.as_str());
                    out.append(title.as_str());
                    let is_regular = match &name.form {
                        Form::Regular => true,
                        _ => false,
                    };
                    if !is_regular {
                        out.append(" (");
                        out.append(name.form.as_str());
                        out.append(")");
                    }
                    out.append("\n");
                },
                None => {
                    return Err(Error::InvalidLanguage(self.config.language.clone()));
                },
            }
        }
        if name.common.info {
            match map_get(&p.desc, self.config.language.as_str()) {
                Some(d) => {
                    push_padded(&mut out, d.as_str(), pad.as_str());
                },
                None => {},
            }
        }
        out.append("\n");
        push_padded(&mut out, art.as_str(), pad.as_str());
        proof {
            reveal_strlit("\n");
            assert("\n"@ =~= seq!['\n']);
            assert(out@ =~= spec_render(
                spec_find_pokemon(self.pokemon@, name.name@)->Some_0,
                name.form,
                art@,
                self.config.language@,
                name.common.info,
                name.common.no_title,
                spaces(name.common.padding_left as nat),
            ));
        }
        Ok(out)
    }

    /// Renders a uniformly chosen entity from the requested generations, in
    /// a uniformly chosen candidate form, shiny on the override or on a draw
    /// against the configured rate. The three draws are independent. Fails
    /// with `InvalidGeneration` when no entity has a requested generation;
    /// otherwise the result is what `show_spec` says for some drawn entity,
    /// some candidate form, and some shininess at least the override.
    pub fn show_random_pokemon(&self, random: &RandomOptions, rng: &mut rand::rngs::StdRng) -> (r:
        Result<String, Error>)
        requires
            self.config.wf(),
            random.generations.wf(),
        ensures
            ({
                let cands = spec_filter_generations(self.pokemon@, random.generations.0@);
                if cands.len() == 0 {
                    r matches Err(Error::InvalidGeneration(raw)) && raw@ == gens_text(
                        random.generations.0@,
                    )
                } else {
                    exists|i: int, f: Form, sh: bool|
                        #![trigger show_spec(
                            *self,
                            cands[i].slug@,
                            f,
                            sh,
                            random.common.info,
                            random.common.no_title,
                            random.common.padding_left as nat,
                            r,
                        )]
                        {
                            &&& 0 <= i < cands.len()
                            &&& spec_candidate_form_ok(cands[i], *random, f)
                            &&& (random.common.shiny ==> sh)
                            &&& show_spec(
                                *self,
                                cands[i].slug@,
                                f,
                                sh,
                                random.common.info,
                                random.common.no_title,
                                random.common.padding_left as nat,
                                r,
                            )
                        }
                }
            }),
    {
        let cands = self.filter_by_generation(&random.generations);
        if cands.len() == 0 {
            proof {
                assert(cands@.map_values(|p: &Pokemon| *p).len() == 0);
            }
            return Err(Error::InvalidGeneration(gens_to_text(&random.generations.0)));
        }
        let idx = rng_below(rng, cands.len() as u64) as usize;
        let p: &Pokemon = cands[idx];
        let forms = candidate_forms(p, random);
        let n = forms.len();
        let pick: usize = if n < usize::MAX {
            rng_below(rng, (n as u64) + 1) as usize
        } else {
            n
        };
        let form = if pick < forms.len() {
            forms[pick].clone()
        } else {
            Form::Regular
        };
        let draw = rng_below(rng, self.config.shiny_denominator);
        let shiny = random.common.shiny || draw < self.config.shiny_numerator;
        let opts = NameOptions {
            name: p.slug.clone(),
            form,
            common: PokemonOptions {
                shiny,
                info: random.common.info,
                no_title: random.common.no_title,
                padding_left: random.common.padding_left,
            },
        };
        let r = self.show_pokemon_by_name(&opts);
        proof {
            let cs = spec_filter_generations(self.pokemon@, random.generations.0@);
            assert(cs[idx as int] == cands@.map_values(|q: &Pokemon| *q)[idx as int]);
            assert(spec_candidate_form_ok(cs[idx as int], *random, opts.form));
            assert(show_spec(
                *self,
                cs[idx as int].slug@,
                opts.form,
                shiny,
                random.common.info,
                random.common.no_title,
                random.common.padding_left as nat,
                r,
            ));
        }
        r
    }
}

} // verus!
