//! The active configuration: the language used for names and descriptions,
//! and the probability of selecting the shiny palette, held as a rational
//! number so that the selection engine can draw against it exactly.

use vstd::prelude::*;

verus! {

/// Runtime configuration of the database. The shiny probability is the
/// rational `shiny_numerator / shiny_denominator` in [0, 1].
#[derive(Debug)]
pub struct Config {
    /// Language used when printing pokemon names and descriptions. Possible
    /// values include en, fr, de, ja, zh_hans, zh_hant.
    pub language: String,
    /// Numerator of the probability to display a shiny pokemon with the
    /// random command.
    pub shiny_numerator: u64,
    /// Denominator of that probability; at least 1.
    pub shiny_denominator: u64,
}

impl Config {
    /// The shiny rate is a probability: a rational in [0, 1].
    pub open spec fn wf(&self) -> bool {
        1 <= self.shiny_denominator && self.shiny_numerator <= self.shiny_denominator
    }
}

impl Default for Config {
    /// English, with a shiny rate of 1/128.
    fn default() -> (c: Config)
        ensures
            c.language@ == "en"@,
            c.shiny_numerator == 1,
            c.shiny_denominator == 128,
            c.wf(),
    {
        Config { language: "en".to_owned(), shiny_numerator: 1, shiny_denominator: 128 }
    }
}

} // verus!
