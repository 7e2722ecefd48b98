use vstd::prelude::*;

verus! {

/// Setting for backtrace details.
#[derive(Debug, Default, PartialEq, Eq, PartialOrd, Ord, Clone, Copy, Hash, Structural)]
#[non_exhaustive]
pub enum Verbosity {
    /// No backtrace will be collected.
    #[default]
    Minimal,
    /// Backtrace will be filtered by the registered filters.
    Medium,
    /// Backtrace will be shown in full.
    Full,
}

/// The verbosity that a backtrace setting's value selects: `"0"` none,
/// `"full"` everything, anything else a filtered backtrace.
pub open spec fn decode_spec(b: Seq<u8>) -> Verbosity {
    if b == seq![48u8] {
        Verbosity::Minimal
    } else if b == seq![49u8] {
        Verbosity::Medium
    } else if b == seq![102u8, 117u8, 108u8, 108u8] {
        Verbosity::Full
    } else {
        Verbosity::Medium
    }
}

pub open spec fn opt_bytes(b: Option<&[u8]>) -> Option<Seq<u8>> {
    match b {
        Some(s) => Some(s@),
        None => None,
    }
}

/// The setting's value that selects each verbosity.
pub open spec fn env_spec(v: Verbosity) -> Seq<char> {
    match v {
        Verbosity::Minimal => "0"@,
        Verbosity::Medium => "1"@,
        Verbosity::Full => "full"@,
    }
}

impl Verbosity {
    /// The verbosity that a backtrace setting's value selects.
    pub fn decode(thing: &[u8]) -> (r: Verbosity)
        ensures
            r == decode_spec(thing@),
    {
        let n = thing.len();
        if n == 1 && thing[0] == 48u8 {
            assert(thing@ =~= seq![48u8]);
            Verbosity::Minimal
        } else if n == 1 && thing[0] == 49u8 {
            assert(thing@ =~= seq![49u8]);
            Verbosity::Medium
        } else if n == 4 && thing[0] == 102u8 && thing[1] == 117u8 && thing[2] == 108u8 && thing[3]
            == 108u8 {
            assert(thing@ =~= seq![102u8, 117u8, 108u8, 108u8]);
            Verbosity::Full
        } else {
            assert(n == 1 ==> thing@[0] == thing[0]);
            Verbosity::Medium
        }
    }

    /// Verbosity for errors, from the values of the library backtrace
    /// setting and of the general backtrace setting, where they are set; the
    /// library one takes precedence.
    pub fn error(lib_backtrace: Option<&[u8]>, backtrace: Option<&[u8]>) -> (r: Option<Verbosity>)
        ensures
            r == match opt_bytes(lib_backtrace) {
                Some(b) => Some(decode_spec(b)),
                None => match opt_bytes(backtrace) {
                    Some(b) => Some(decode_spec(b)),
                    None => None,
                },
            },
    {
        match lib_backtrace {
            Some(b) => Some(Verbosity::decode(b)),
            None => match backtrace {
                Some(b) => Some(Verbosity::decode(b)),
                None => None,
            },
        }
    }

    /// Verbosity for panics, from the value of the general backtrace
    /// setting, where it is set.
    pub fn panic(backtrace: Option<&[u8]>) -> (r: Option<Verbosity>)
        ensures
            r == match opt_bytes(backtrace) {
                Some(b) => Some(decode_spec(b)),
                None => None,
            },
    {
        match backtrace {
            Some(b) => Some(Verbosity::decode(b)),
            None => None,
        }
    }

    /// The backtrace setting's value that selects this verbosity.
    pub fn env(self) -> (r: &'static str)
        ensures
            r@ == env_spec(self),
    {
        match self {
            Verbosity::Minimal => "0",
            Verbosity::Medium => "1",
            Verbosity::Full => "full",
        }
    }
}

} // verus!
