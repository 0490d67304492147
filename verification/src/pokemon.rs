//! The pokemon record: an immutable entity with its slug, generation,
//! localized text maps and available forms, together with form-exclusion
//! matching and asset-key resolution.

use vstd::prelude::*;

use crate::error::Error;
use crate::form::{form_eqv, spec_form_token, Form};
use crate::text::eq_str;

verus! {

/// An immutable species entity. `slug` is the stable asset-key prefix;
/// `name` and `desc` map language codes to localized text (`desc` may omit
/// languages); `forms` lists the non-Regular forms available for the species
/// (Regular is always implicitly available).
#[derive(Debug)]
pub struct Pokemon {
    /// The asset slug of the pokemon, before any form/shiny resolution.
    pub slug: String,
    /// The generation of the pokemon.
    pub gen: u8,
    /// The name of the pokemon in different languages.
    pub name: Vec<(String, String)>,
    /// The description of the pokemon in different languages.
    pub desc: Vec<(String, String)>,
    /// The different forms of the pokemon.
    pub forms: Vec<Form>,
}

/// Whether the form `f` appears in `forms`, comparing by value.
pub open spec fn has_form(forms: Seq<Form>, f: Form) -> bool {
    exists|i: int| 0 <= i < forms.len() && form_eqv(forms[i], f)
}

/// Whether a request for form `f` is valid for an entity with form list
/// `forms`: Regular is always available, anything else must be listed.
pub open spec fn form_available(forms: Seq<Form>, f: Form) -> bool {
    f is Regular || has_form(forms, f)
}

/// Whether the excluded form `ex` rules the candidate `f` out. Named forms
/// are matched by value; any `Other` exclusion rules out every `Other`
/// candidate, whatever either one's token (legacy behaviour, preserved).
pub open spec fn form_excluded_by(f: Form, ex: Form) -> bool {
    match (ex, f) {
        (Form::Other(_), Form::Other(_)) => true,
        _ => form_eqv(ex, f),
    }
}

/// Whether any form in `exclude` rules the candidate `f` out.
pub open spec fn form_excluded(f: Form, exclude: Seq<Form>) -> bool {
    exists|i: int| 0 <= i < exclude.len() && form_excluded_by(f, #[trigger] exclude[i])
}

/// The asset slug for a resolved form: the bare slug for Regular, otherwise
/// the slug with the form token appended after a hyphen.
pub open spec fn spec_form_slug(slug: Seq<char>, f: Form) -> Seq<char> {
    if f is Regular {
        slug
    } else {
        slug + "-"@ + spec_form_token(f)
    }
}

/// The asset key for a resolved (slug, form, shininess) triple: the form
/// slug, placed in the shiny or the regular namespace.
pub open spec fn spec_art_key(slug: Seq<char>, f: Form, shiny: bool) -> Seq<char> {
    "colorscripts/"@ + (if shiny {
        "shiny"@
    } else {
        "regular"@
    }) + "/"@ + spec_form_slug(slug, f)
}

/// Compares two forms by value (`Other` payloads by their token).
pub fn form_eq(a: &Form, b: &Form) -> (r: bool)
    ensures
        r == form_eqv(*a, *b),
{
    match (a, b) {
        (Form::Regular, Form::Regular) => true,
        (Form::Mega, Form::Mega) => true,
        (Form::MegaX, Form::MegaX) => true,
        (Form::MegaY, Form::MegaY) => true,
        (Form::Gmax, Form::Gmax) => true,
        (Form::Alola, Form::Alola) => true,
        (Form::Galar, Form::Galar) => true,
        (Form::Hisui, Form::Hisui) => true,
        (Form::Paldea, Form::Paldea) => true,
        (Form::Other(x), Form::Other(y)) => eq_str(x.as_str(), y.as_str()),
        _ => false,
    }
}

/// Whether any form in `exclude` rules the candidate `f` out.
fn form_excluded_exec(f: &Form, exclude: &[Form]) -> (r: bool)
    ensures
        r == form_excluded(*f, exclude@),
{
    let mut i: usize = 0;
    while i < exclude.len()
        invariant
            i <= exclude@.len(),
            forall|j: int| 0 <= j < i ==> !form_excluded_by(*f, #[trigger] exclude@[j]),
        decreases exclude@.len() - i,
    {
        let ruled_out = match (&exclude[i], f) {
            (Form::Other(_), Form::Other(_)) => true,
            (ex, cand) => form_eq(ex, cand),
        };
        if ruled_out {
            return true;
        }
        i += 1;
    }
    false
}

impl Pokemon {
    /// All forms of the pokemon except those ruled out by `exclude`, in their
    /// original order.
    pub fn get_filtered_forms(&self, exclude: &[Form]) -> (r: Vec<Form>)
        ensures
            r@ == self.forms@.filter(|f: Form| !form_excluded(f, exclude@)),
    {
        let mut out: Vec<Form> = Vec::new();
        let mut i: usize = 0;
        proof {
            assert(self.forms@.take(0) =~= Seq::<Form>::empty());
            assert(out@ =~= self.forms@.take(0).filter(|f: Form| !form_excluded(f, exclude@)));
        }
        while i < self.forms.len()
            invariant
                i <= self.forms@.len(),
                out@ == self.forms@.take(i as int).filter(
                    |f: Form| !form_excluded(f, exclude@),
                ),
            decreases self.forms@.len() - i,
        {
            proof {
                assert(self.forms@.take(i + 1) =~= self.forms@.take(i as int).push(
                    self.forms@[i as int],
                ));
                self.forms@.take(i as int).lemma_filter_push(
                    self.forms@[i as int],
                    |f: Form| !form_excluded(f, exclude@),
                );
            }
            if !form_excluded_exec(&self.forms[i], exclude) {
                out.push(self.forms[i].clone());
            }
            i += 1;
        }
        proof {
            assert(self.forms@.take(self.forms@.len() as int) =~= self.forms@);
        }
        out
    }

    /// The asset slug for the requested form: the bare slug for Regular, the
    /// hyphenated form slug for a listed form, and `InvalidPokemonForm` for
    /// any form the species does not have.
    pub fn get_form_slug(&self, form: &Form) -> (r: Result<String, Error>)
        ensures
            match r {
                Ok(s) => form_available(self.forms@, *form) && s@ == spec_form_slug(
                    self.slug@,
                    *form,
                ),
                Err(e) => !form_available(self.forms@, *form) && (
                e matches Error::InvalidPokemonForm(slug, tok) && slug@ == self.slug@ && tok@
                    == spec_form_token(*form)),
            },
    {
        let is_regular = match form {
            Form::Regular => true,
            _ => false,
        };
        if is_regular {
            return Ok(self.slug.clone());
        }
        let mut i: usize = 0;
        while i < self.forms.len()
            invariant
                !(*form is Regular),
                i <= self.forms@.len(),
                forall|j: int| 0 <= j < i ==> !form_eqv(self.forms@[j], *form),
            decreases self.forms@.len() - i,
        {
            if form_eq(&self.forms[i], form) {
                let mut s = self.slug.clone();
                s.append("-");
                s.append(form.as_str());
                proof {
                    assert(s@ =~= spec_form_slug(self.slug@, *form));
                }
                return Ok(s);
            }
            i += 1;
        }
        let tok = form.as_str();
        Err(Error::InvalidPokemonForm(self.slug.clone(), tok.to_owned()))
    }

    /// The asset key for the requested form and shininess, partitioned into
    /// the shiny or the regular namespace; `InvalidPokemonForm` for a form
    /// the species does not have.
    pub fn get_art_path(&self, form: &Form, shiny: bool) -> (r: Result<String, Error>)
        ensures
            match r {
                Ok(s) => form_available(self.forms@, *form) && s@ == spec_art_key(
                    self.slug@,
                    *form,
                    shiny,
                ),
                Err(e) => !form_available(self.forms@, *form) && (
                e matches Error::InvalidPokemonForm(slug, tok) && slug@ == self.slug@ && tok@
                    == spec_form_token(*form)),
            },
    {
        match self.get_form_slug(form) {
            Ok(fs) => {
                let mut s = String::new();
                s.append("colorscripts/");
                if shiny {
                    s.append("shiny");
                } else {
                    s.append("regular");
                }
                s.append("/");
                s.append(fs.as_str());
                Ok(s)
            },
            Err(e) => Err(e),
        }
    }
}

} // verus!
