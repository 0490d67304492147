//! The form model: a closed enumeration of the nine canonical form tokens
//! plus an open catch-all for one-off tokens, with the matching semantics the
//! selection engine uses to exclude forms.

use vstd::prelude::*;

use crate::text::eq_str;

verus! {

broadcast use vstd::string::group_string_axioms;

/// A named variant appearance of a species. The nine canonical tokens map
/// bijectively to the named variants; any other token is carried verbatim in
/// `Other`, so formatting a form recovers exactly the token it was parsed
/// from.
#[derive(Debug, PartialEq, Eq)]
pub enum Form {
    Regular,
    Mega,
    MegaX,
    MegaY,
    Gmax,
    Alola,
    Galar,
    Hisui,
    Paldea,
    /// Catch-all for one-off tokens such as "primal".
    Other(String),
}

/// The token that `Form::as_str` yields for `f`.
pub open spec fn spec_form_token(f: Form) -> Seq<char> {
    match f {
        Form::Regular => "regular"@,
        Form::Mega => "mega"@,
        Form::MegaX => "mega-x"@,
        Form::MegaY => "mega-y"@,
        Form::Gmax => "gmax"@,
        Form::Alola => "alola"@,
        Form::Galar => "galar"@,
        Form::Hisui => "hisui"@,
        Form::Paldea => "paldea"@,
        Form::Other(s) => s@,
    }
}

/// Whether `s` is one of the nine canonical form tokens.
pub open spec fn is_canonical_token(s: Seq<char>) -> bool {
    ||| s == "regular"@
    ||| s == "mega"@
    ||| s == "mega-x"@
    ||| s == "mega-y"@
    ||| s == "gmax"@
    ||| s == "alola"@
    ||| s == "galar"@
    ||| s == "hisui"@
    ||| s == "paldea"@
}

/// What `Form::from_str` returns on the token `s`: the named variant for a
/// canonical token, and `Other` carrying the token itself for anything else.
pub open spec fn form_from_spec(s: Seq<char>, r: Form) -> bool {
    &&& (r == Form::Regular <==> s == "regular"@)
    &&& (r == Form::Mega <==> s == "mega"@)
    &&& (r == Form::MegaX <==> s == "mega-x"@)
    &&& (r == Form::MegaY <==> s == "mega-y"@)
    &&& (r == Form::Gmax <==> s == "gmax"@)
    &&& (r == Form::Alola <==> s == "alola"@)
    &&& (r == Form::Galar <==> s == "galar"@)
    &&& (r == Form::Hisui <==> s == "hisui"@)
    &&& (r == Form::Paldea <==> s == "paldea"@)
    &&& (r matches Form::Other(t) ==> t@ == s && !is_canonical_token(s))
}

/// Equality of forms by value: named variants must coincide, and two `Other`
/// forms are equal when they carry the same token.
pub open spec fn form_eqv(a: Form, b: Form) -> bool {
    match (a, b) {
        (Form::Other(x), Form::Other(y)) => x@ == y@,
        _ => a == b,
    }
}

impl Clone for Form {
    /// Clones preserve the form value.
    fn clone(&self) -> (r: Self)
        ensures
            r == *self,
    {
        match self {
            Form::Regular => Form::Regular,
            Form::Mega => Form::Mega,
            Form::MegaX => Form::MegaX,
            Form::MegaY => Form::MegaY,
            Form::Gmax => Form::Gmax,
            Form::Alola => Form::Alola,
            Form::Galar => Form::Galar,
            Form::Hisui => Form::Hisui,
            Form::Paldea => Form::Paldea,
            Form::Other(s) => Form::Other(s.clone()),
        }
    }
}

impl Form {
    /// Parses a form token: the nine canonical tokens map to their named
    /// variants, and any other token is preserved verbatim in `Other`.
    pub fn from_str(form: &str) -> (r: Form)
        ensures
            form_from_spec(form@, r),
    {
        proof {
            reveal_strlit("regular");
            reveal_strlit("mega");
            reveal_strlit("mega-x");
            reveal_strlit("mega-y");
            reveal_strlit("gmax");
            reveal_strlit("alola");
            reveal_strlit("galar");
            reveal_strlit("hisui");
            reveal_strlit("paldea");
            assert("regular"@.len() == 7);
            assert("mega"@.len() == 4);
            assert("mega-x"@.len() == 6);
            assert("mega-y"@.len() == 6);
            assert("gmax"@.len() == 4);
            assert("alola"@.len() == 5);
            assert("galar"@.len() == 5);
            assert("hisui"@.len() == 5);
            assert("paldea"@.len() == 6);
            assert("mega"@ != "gmax"@) by {
                assert("mega"@[0] == 'm');
                assert("gmax"@[0] == 'g');
            }
            assert("mega-x"@ != "mega-y"@) by {
                assert("mega-x"@[5] == 'x');
                assert("mega-y"@[5] == 'y');
            }
            assert("mega-x"@ != "paldea"@) by {
                assert("mega-x"@[0] == 'm');
                assert("paldea"@[0] == 'p');
            }
            assert("mega-y"@ != "paldea"@) by {
                assert("mega-y"@[0] == 'm');
                assert("paldea"@[0] == 'p');
            }
            assert("alola"@ != "galar"@) by {
                assert("alola"@[0] == 'a');
                assert("galar"@[0] == 'g');
            }
            assert("alola"@ != "hisui"@) by {
                assert("alola"@[0] == 'a');
                assert("hisui"@[0] == 'h');
            }
            assert("galar"@ != "hisui"@) by {
                assert("galar"@[0] == 'g');
                assert("hisui"@[0] == 'h');
            }
        }
        if eq_str(form, "regular") {
            Form::Regular
        } else if eq_str(form, "mega") {
            Form::Mega
        } else if eq_str(form, "mega-x") {
            Form::MegaX
        } else if eq_str(form, "mega-y") {
            Form::MegaY
        } else if eq_str(form, "gmax") {
            Form::Gmax
        } else if eq_str(form, "alola") {
            Form::Alola
        } else if eq_str(form, "galar") {
            Form::Galar
        } else if eq_str(form, "hisui") {
            Form::Hisui
        } else if eq_str(form, "paldea") {
            Form::Paldea
        } else {
            Form::Other(form.to_owned())
        }
    }

    /// Formats the form back into its token.
    pub fn as_str(&self) -> (r: &str)
        ensures
            r@ == spec_form_token(*self),
    {
        match self {
            Form::Regular => "regular",
            Form::Mega => "mega",
            Form::MegaX => "mega-x",
            Form::MegaY => "mega-y",
            Form::Gmax => "gmax",
            Form::Alola => "alola",
            Form::Galar => "galar",
            Form::Hisui => "hisui",
            Form::Paldea => "paldea",
            Form::Other(s) => s.as_str(),
        }
    }
}

/// Round trip, token side: parsing any token and formatting the result gives
/// back exactly the token, for canonical and unknown tokens alike.
pub proof fn lemma_form_token_round_trip(s: Seq<char>, f: Form)
    requires
        form_from_spec(s, f),
    ensures
        spec_form_token(f) == s,
{
}

/// Round trip, value side: formatting a form and re-parsing the token yields
/// the same form again, provided an `Other` form does not smuggle a canonical
/// token (such a value cannot itself come out of the parser).
pub proof fn lemma_form_round_trip(f: Form, g: Form)
    requires
        !(f matches Form::Other(t) && is_canonical_token(t@)),
        form_from_spec(spec_form_token(f), g),
    ensures
        form_eqv(g, f),
{
}

} // verus!
