//! The properties by which a font is looked up.

use vstd::prelude::*;
use vstd::string::StringExecFns;

verus! {

/// Collects the properties of the font that is wanted: a family name and
/// style flags. Looking the font up is left to the caller.
#[derive(Debug)]
pub struct FontBuilder {
    pub italic: bool,
    pub oblique: bool,
    pub bold: bool,
    pub monospace: bool,
    pub family: String,
}

impl Default for FontBuilder {
    fn default() -> (builder: FontBuilder)
        ensures
            !builder.italic,
            !builder.oblique,
            !builder.bold,
            !builder.monospace,
            builder.family@ == Seq::<char>::empty(),
    {
        FontBuilder {
            italic: false,
            oblique: false,
            bold: false,
            monospace: false,
            family: String::new(),
        }
    }
}

impl FontBuilder {
    /// Asks for an italic font.
    pub fn italic(&mut self) -> (this: &mut FontBuilder)
        ensures
            *this == (FontBuilder { italic: true, ..*old(self) }),
            *final(self) == *final(this),
    {
        self.italic = true;
        self
    }

    /// Asks for an oblique font.
    pub fn oblique(&mut self) -> (this: &mut FontBuilder)
        ensures
            *this == (FontBuilder { oblique: true, ..*old(self) }),
            *final(self) == *final(this),
    {
        self.oblique = true;
        self
    }

    /// Asks for a bold font.
    pub fn bold(&mut self) -> (this: &mut FontBuilder)
        ensures
            *this == (FontBuilder { bold: true, ..*old(self) }),
            *final(self) == *final(this),
    {
        self.bold = true;
        self
    }

    /// Asks for a monospace font.
    pub fn monospace(&mut self) -> (this: &mut FontBuilder)
        ensures
            *this == (FontBuilder { monospace: true, ..*old(self) }),
            *final(self) == *final(this),
    {
        self.monospace = true;
        self
    }

    /// Asks for a font of the family called `name`.
    pub fn family(&mut self, name: &str) -> (this: &mut FontBuilder)
        ensures
            this.family@ == name@,
            this.italic == old(self).italic,
            this.oblique == old(self).oblique,
            this.bold == old(self).bold,
            this.monospace == old(self).monospace,
            *final(self) == *final(this),
    {
        self.family = String::from_str(name);
        self
    }
}

} // verus!
