//! Flags and sets of flags, by name.
use vstd::prelude::*;

use crate::text::texts;

verus! {

/// A set of flags.
pub trait FlagSet: Sized {
    type Flag: Flag;

    /// Whether a flag is enabled.
    spec fn enabled(&self, flag: Self::Flag) -> bool;

    /// The names of all enabled flags.
    spec fn enabled_names(&self) -> Seq<Seq<char>>;

    /// The names of all enabled flags are those of the flags that are enabled, and no others.
    proof fn names_are_of_enabled_flags(&self, flag: Self::Flag)
        ensures
            self.enabled(flag) <==> self.enabled_names().contains(flag.flag_name()),
    ;

    /// Checks if a given flag is enabled.
    fn is_set(&self, flag: Self::Flag) -> (set: bool)
        ensures
            set == self.enabled(flag),
    ;

    /// Returns the names of all enabled flags.
    fn as_names(&self) -> (names: Vec<&'static str>)
        ensures
            texts(names@) == self.enabled_names(),
    ;
}

/// One flag.
pub trait Flag {
    /// The flag's name.
    spec fn flag_name(&self) -> Seq<char>;

    /// Returns the name of this flag.
    fn as_name(&self) -> (name: &'static str)
        ensures
            name@ == self.flag_name(),
    ;
}

} // verus!
