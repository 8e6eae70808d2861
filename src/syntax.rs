use vstd::prelude::*;

use crate::flags::{
    RegexOptions, SyntaxBehavior, SyntaxOperator, REGEX_OPTION_NONE, SYNTAX_OPERATORS_RUBY,
};

verus! {

/// The code that stands for a meta character that is switched off.
pub const INEFFECTIVE_META_CHAR: u32 = 0;

/// Which meta character `set_meta_char` sets.
pub type MetaCharType = u32;

pub const META_CHAR_ESCAPE: MetaCharType = 0;

pub const META_CHAR_ANYCHAR: MetaCharType = 1;

pub const META_CHAR_ANYTIME: MetaCharType = 2;

pub const META_CHAR_ZERO_OR_ONE_TIME: MetaCharType = 3;

pub const META_CHAR_ONE_OR_MORE_TIME: MetaCharType = 4;

pub const META_CHAR_ANYCHAR_ANYTIME: MetaCharType = 5;

/// What plays the part of a meta character in a syntax.
#[derive(Clone, Copy, Debug, PartialEq, Eq, Structural)]
pub enum MetaChar {
    /// This character.
    Character(char),
    /// No character: the meta character is switched off.
    Ineffective,
}

impl MetaChar {
    /// The code of the meta character: its scalar value, or
    /// `INEFFECTIVE_META_CHAR`.
    pub fn code(&self) -> (r: u32)
        ensures
            r == match *self {
                MetaChar::Character(c) => c as u32,
                MetaChar::Ineffective => INEFFECTIVE_META_CHAR,
            },
    {
        match self {
            MetaChar::Character(c) => *c as u32,
            MetaChar::Ineffective => INEFFECTIVE_META_CHAR,
        }
    }
}

/// The pattern dialects that syntaxes are named after.
#[derive(Clone, Copy, Debug, PartialEq, Eq, Structural)]
pub enum Dialect {
    Ruby,
    Asis,
    PosixBasic,
    PosixExtended,
    Emacs,
    Grep,
    GnuRegex,
    Java,
    Perl,
    PerlNg,
}

/// A pattern dialect: the operators it recognises, its behaviours and the
/// compile options it always adds.
#[derive(Clone, Copy, Debug, PartialEq, Eq, Structural)]
pub struct Syntax {
    dialect: Dialect,
    operators: SyntaxOperator,
    behavior: SyntaxBehavior,
    options: RegexOptions,
    meta_escape: u32,
    meta_anychar: u32,
    meta_anytime: u32,
    meta_zero_or_one_time: u32,
    meta_one_or_more_time: u32,
    meta_anychar_anytime: u32,
}

impl Syntax {
    pub closed spec fn operators_spec(&self) -> SyntaxOperator {
        self.operators
    }

    pub closed spec fn behavior_spec(&self) -> SyntaxBehavior {
        self.behavior
    }

    pub closed spec fn options_spec(&self) -> RegexOptions {
        self.options
    }

    pub closed spec fn dialect_spec(&self) -> Dialect {
        self.dialect
    }

    /// The code of each meta character, in the order of `MetaCharType`.
    pub closed spec fn meta_chars_spec(&self) -> Seq<u32> {
        seq![
            self.meta_escape,
            self.meta_anychar,
            self.meta_anytime,
            self.meta_zero_or_one_time,
            self.meta_one_or_more_time,
            self.meta_anychar_anytime,
        ]
    }

    /// A syntax with the given operators, behaviours and options.
    pub fn new(operators: SyntaxOperator, behavior: SyntaxBehavior, options: RegexOptions) -> (r:
        Syntax)
        ensures
            r.dialect_spec() == Dialect::Ruby,
            r.operators_spec() == operators,
            r.behavior_spec() == behavior,
            r.options_spec() == options,
    {
        Syntax {
            dialect: Dialect::Ruby,
            operators,
            behavior,
            options,
            meta_escape: 92,
            meta_anychar: INEFFECTIVE_META_CHAR,
            meta_anytime: INEFFECTIVE_META_CHAR,
            meta_zero_or_one_time: INEFFECTIVE_META_CHAR,
            meta_one_or_more_time: INEFFECTIVE_META_CHAR,
            meta_anychar_anytime: INEFFECTIVE_META_CHAR,
        }
    }

    /// The Ruby syntax.
    pub fn ruby() -> (r: Syntax)
        ensures
            r.dialect_spec() == Dialect::Ruby,
            r.operators_spec() == SYNTAX_OPERATORS_RUBY,
            r.behavior_spec() == 0,
            r.options_spec() == REGEX_OPTION_NONE,
    {
        Syntax::new(SYNTAX_OPERATORS_RUBY, 0, REGEX_OPTION_NONE)
    }

    /// Plain text: no operator at all. The engine reads only the Ruby
    /// syntax, so compiling with this syntax is refused.
    pub fn asis() -> (r: Syntax)
        ensures
            r.dialect_spec() == Dialect::Asis,
            r.operators_spec() == 0,
            r.behavior_spec() == 0,
            r.options_spec() == REGEX_OPTION_NONE,
    {
        Syntax::named(Dialect::Asis)
    }

    /// POSIX basic regular expressions. The engine reads only the Ruby syntax, so compiling with
    /// this syntax is refused; its operators are not modelled and read as none.
    pub fn posix_basic() -> (r: Syntax)
        ensures
            r.dialect_spec() == Dialect::PosixBasic,
            r.operators_spec() == 0,
            r.behavior_spec() == 0,
            r.options_spec() == REGEX_OPTION_NONE,
    {
        Syntax::named(Dialect::PosixBasic)
    }

    /// POSIX extended regular expressions. The engine reads only the Ruby syntax, so compiling with
    /// this syntax is refused; its operators are not modelled and read as none.
    pub fn posix_extended() -> (r: Syntax)
        ensures
            r.dialect_spec() == Dialect::PosixExtended,
            r.operators_spec() == 0,
            r.behavior_spec() == 0,
            r.options_spec() == REGEX_OPTION_NONE,
    {
        Syntax::named(Dialect::PosixExtended)
    }

    /// Emacs regular expressions. The engine reads only the Ruby syntax, so compiling with
    /// this syntax is refused; its operators are not modelled and read as none.
    pub fn emacs() -> (r: Syntax)
        ensures
            r.dialect_spec() == Dialect::Emacs,
            r.operators_spec() == 0,
            r.behavior_spec() == 0,
            r.options_spec() == REGEX_OPTION_NONE,
    {
        Syntax::named(Dialect::Emacs)
    }

    /// grep regular expressions. The engine reads only the Ruby syntax, so compiling with
    /// this syntax is refused; its operators are not modelled and read as none.
    pub fn grep() -> (r: Syntax)
        ensures
            r.dialect_spec() == Dialect::Grep,
            r.operators_spec() == 0,
            r.behavior_spec() == 0,
            r.options_spec() == REGEX_OPTION_NONE,
    {
        Syntax::named(Dialect::Grep)
    }

    /// GNU regex. The engine reads only the Ruby syntax, so compiling with
    /// this syntax is refused; its operators are not modelled and read as none.
    pub fn gnu_regex() -> (r: Syntax)
        ensures
            r.dialect_spec() == Dialect::GnuRegex,
            r.operators_spec() == 0,
            r.behavior_spec() == 0,
            r.options_spec() == REGEX_OPTION_NONE,
    {
        Syntax::named(Dialect::GnuRegex)
    }

    /// Java regular expressions. The engine reads only the Ruby syntax, so compiling with
    /// this syntax is refused; its operators are not modelled and read as none.
    pub fn java() -> (r: Syntax)
        ensures
            r.dialect_spec() == Dialect::Java,
            r.operators_spec() == 0,
            r.behavior_spec() == 0,
            r.options_spec() == REGEX_OPTION_NONE,
    {
        Syntax::named(Dialect::Java)
    }

    /// Perl regular expressions. The engine reads only the Ruby syntax, so compiling with
    /// this syntax is refused; its operators are not modelled and read as none.
    pub fn perl() -> (r: Syntax)
        ensures
            r.dialect_spec() == Dialect::Perl,
            r.operators_spec() == 0,
            r.behavior_spec() == 0,
            r.options_spec() == REGEX_OPTION_NONE,
    {
        Syntax::named(Dialect::Perl)
    }

    /// Perl with named groups. The engine reads only the Ruby syntax, so compiling with
    /// this syntax is refused; its operators are not modelled and read as none.
    pub fn perl_ng() -> (r: Syntax)
        ensures
            r.dialect_spec() == Dialect::PerlNg,
            r.operators_spec() == 0,
            r.behavior_spec() == 0,
            r.options_spec() == REGEX_OPTION_NONE,
    {
        Syntax::named(Dialect::PerlNg)
    }

    /// A syntax of `dialect` with no operators, behaviours or options.
    fn named(dialect: Dialect) -> (r: Syntax)
        ensures
            r.dialect_spec() == dialect,
            r.operators_spec() == 0,
            r.behavior_spec() == 0,
            r.options_spec() == REGEX_OPTION_NONE,
    {
        let mut syntax = Syntax::new(0, 0, REGEX_OPTION_NONE);
        syntax.dialect = dialect;
        syntax
    }

    /// The dialect the syntax is named after.
    pub fn dialect(&self) -> (r: Dialect)
        ensures
            r == self.dialect_spec(),
    {
        self.dialect
    }

    /// The syntax patterns are read in unless another is named: Ruby's.
    pub fn default() -> (r: Syntax)
        ensures
            r.dialect_spec() == Dialect::Ruby,
            r.operators_spec() == SYNTAX_OPERATORS_RUBY,
            r.behavior_spec() == 0,
            r.options_spec() == REGEX_OPTION_NONE,
    {
        Syntax::ruby()
    }

    pub open spec fn default_operators() -> SyntaxOperator {
        SYNTAX_OPERATORS_RUBY
    }

    pub fn operators(&self) -> (r: SyntaxOperator)
        ensures
            r == self.operators_spec(),
    {
        self.operators
    }

    pub fn set_operators(&mut self, operators: SyntaxOperator)
        ensures
            final(self).dialect_spec() == old(self).dialect_spec(),
            final(self).operators_spec() == operators,
            final(self).behavior_spec() == old(self).behavior_spec(),
            final(self).options_spec() == old(self).options_spec(),
    {
        self.operators = operators;
    }

    /// Turns the given operators on, leaving the others as they are.
    pub fn enable_operators(&mut self, operators: SyntaxOperator)
        ensures
            final(self).dialect_spec() == old(self).dialect_spec(),
            final(self).operators_spec() == old(self).operators_spec() | operators,
            final(self).behavior_spec() == old(self).behavior_spec(),
            final(self).options_spec() == old(self).options_spec(),
    {
        self.operators = self.operators | operators;
    }

    /// Turns the given operators off, leaving the others as they are.
    pub fn disable_operators(&mut self, operators: SyntaxOperator)
        ensures
            final(self).dialect_spec() == old(self).dialect_spec(),
            final(self).operators_spec() == old(self).operators_spec() & !operators,
            final(self).behavior_spec() == old(self).behavior_spec(),
            final(self).options_spec() == old(self).options_spec(),
    {
        self.operators = self.operators & !operators;
    }

    pub fn behavior(&self) -> (r: SyntaxBehavior)
        ensures
            r == self.behavior_spec(),
    {
        self.behavior
    }

    pub fn set_behavior(&mut self, behavior: SyntaxBehavior)
        ensures
            final(self).dialect_spec() == old(self).dialect_spec(),
            final(self).behavior_spec() == behavior,
            final(self).operators_spec() == old(self).operators_spec(),
            final(self).options_spec() == old(self).options_spec(),
    {
        self.behavior = behavior;
    }

    /// Turns the given behaviours on, leaving the others as they are.
    pub fn enable_behavior(&mut self, behavior: SyntaxBehavior)
        ensures
            final(self).dialect_spec() == old(self).dialect_spec(),
            final(self).behavior_spec() == old(self).behavior_spec() | behavior,
            final(self).operators_spec() == old(self).operators_spec(),
            final(self).options_spec() == old(self).options_spec(),
    {
        self.behavior = self.behavior | behavior;
    }

    /// Turns the given behaviours off, leaving the others as they are.
    pub fn disable_behavior(&mut self, behavior: SyntaxBehavior)
        ensures
            final(self).dialect_spec() == old(self).dialect_spec(),
            final(self).behavior_spec() == old(self).behavior_spec() & !behavior,
            final(self).operators_spec() == old(self).operators_spec(),
            final(self).options_spec() == old(self).options_spec(),
    {
        self.behavior = self.behavior & !behavior;
    }

    pub fn options(&self) -> (r: RegexOptions)
        ensures
            r == self.options_spec(),
    {
        self.options
    }

    /// Sets the meta character `what` (one of the `META_CHAR_` kinds; any
    /// other leaves the syntax as it is). Meta characters matter only to a
    /// syntax with variable meta characters, which Ruby's is not.
    pub fn set_meta_char(&mut self, what: MetaCharType, meta: MetaChar)
        ensures
            final(self).dialect_spec() == old(self).dialect_spec(),
            final(self).operators_spec() == old(self).operators_spec(),
            final(self).behavior_spec() == old(self).behavior_spec(),
            final(self).options_spec() == old(self).options_spec(),
            what < 6 ==> final(self).meta_chars_spec() == old(self).meta_chars_spec().update(
                what as int,
                match meta {
                    MetaChar::Character(c) => c as u32,
                    MetaChar::Ineffective => INEFFECTIVE_META_CHAR,
                },
            ),
            what >= 6 ==> final(self).meta_chars_spec() == old(self).meta_chars_spec(),
    {
        let code = meta.code();
        if what == META_CHAR_ESCAPE {
            self.meta_escape = code;
        } else if what == META_CHAR_ANYCHAR {
            self.meta_anychar = code;
        } else if what == META_CHAR_ANYTIME {
            self.meta_anytime = code;
        } else if what == META_CHAR_ZERO_OR_ONE_TIME {
            self.meta_zero_or_one_time = code;
        } else if what == META_CHAR_ONE_OR_MORE_TIME {
            self.meta_one_or_more_time = code;
        } else if what == META_CHAR_ANYCHAR_ANYTIME {
            self.meta_anychar_anytime = code;
        }
        proof {
            assert(what < 6 ==> self.meta_chars_spec() =~= old(self).meta_chars_spec().update(what as int, code));
            assert(what >= 6 ==> self.meta_chars_spec() =~= old(self).meta_chars_spec());
        }
    }

    pub fn set_options(&mut self, options: RegexOptions)
        ensures
            final(self).dialect_spec() == old(self).dialect_spec(),
            final(self).options_spec() == options,
            final(self).operators_spec() == old(self).operators_spec(),
            final(self).behavior_spec() == old(self).behavior_spec(),
    {
        self.options = options;
    }
}

} // verus!
